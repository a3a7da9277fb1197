//! Laws of literal text: what is text from end to end compiles to a single
//! text, a backslash before braces makes them text, and braces without one
//! end it.
use crate::error::{is_tag_rule, Fault};
use crate::expr::Expr;
use crate::grammar::{body, construct, literal_step, spec_kind};
use crate::rule::{Rule, RuleKind};
use crate::semantics::{
    after, enter, eval, gap, nothing_tried, outset, parsed, peek, repeat, skip_space, text_at,
    Ctx, Furthest, Res,
};
use crate::template::{
    compiled, first_ill_named, is_block_rule, narrowed, plain, tag_before, tag_from, text_of,
    trimmed, TemplateView,
};
use crate::tree::Node;
use vstd::prelude::*;
use vstd::string::StringSliceAdditionalSpecFns;

verus! {

/// Nowhere in `s` do two opening braces stand side by side.
pub open spec fn brace_free(s: Seq<u8>) -> bool {
    forall|i: int| 0 <= i && i + 1 < s.len() ==> !(#[trigger] s[i] == 0x7b && s[i + 1] == 0x7b)
}

/// The bytes of the texts with which tags and escapes start.
proof fn lemma_openers()
    ensures
        "{{".spec_bytes() == seq![0x7bu8, 0x7bu8],
        "\\".spec_bytes() == seq![0x5cu8],
        "{{{".spec_bytes().len() == 3,
        "{{{{".spec_bytes().len() == 4,
        "{{!".spec_bytes().len() == 3,
{
    reveal_strlit("{{");
    reveal_strlit("\\");
    reveal_strlit("{{{");
    reveal_strlit("{{{{");
    reveal_strlit("{{!");
    broadcast use vstd::string::is_ascii_spec_bytes;

    assert(vstd::string::is_ascii("{{"));
    assert(vstd::string::is_ascii("\\"));
    assert(vstd::string::is_ascii("{{{"));
    assert(vstd::string::is_ascii("{{{{"));
    assert(vstd::string::is_ascii("{{!"));
    assert("{{".spec_bytes() =~= seq![0x7bu8, 0x7bu8]);
    assert("\\".spec_bytes() =~= seq![0x5cu8]);
}

/// Repeating a text never runs too deep.
proof fn lemma_repeat_text(t: &'static str, s: Seq<u8>, c: Ctx, pos: int, f: Furthest, first: bool)
    ensures
        !(repeat(Expr::Text(t), s, c, pos, f, first).res is TooDeep),
    decreases s.len() - pos,
{
    if 0 <= pos <= s.len() {
        let from = if first {
            pos
        } else {
            gap(s, c, pos)
        };
        let one = eval(Expr::Text(t), s, c, from, f);
        match one.res {
            Res::Match { end, nodes } => {
                if pos < end <= s.len() {
                    lemma_repeat_text(t, s, c, end, one.far, false);
                }
            },
            _ => {},
        }
    }
}

/// Without two braces side by side nothing is an escape.
proof fn lemma_no_escape(s: Seq<u8>, c: Ctx, pos: int, f: Furthest)
    requires
        brace_free(s),
        0 <= pos <= s.len(),
        c.depth > 0,
    ensures
        eval(Expr::Call(Rule::escape), s, c, pos, f).res == Res::NoMatch,
{
    reveal(body);
    reveal(spec_kind);
    reveal_with_fuel(eval, 6);
    lemma_openers();
    let inside = enter(c, Rule::escape, pos);
    assert(inside.joined);
    let braces = "{{".spec_bytes();
    assert forall|p: int| !text_at(s, p, braces) by {
        if text_at(s, p, braces) {
            assert(s[p + 0] == braces[0]);
            assert(s[p + 1] == braces[1]);
            assert(s[p] == 0x7b);
        }
    }
    let slash = eval(Expr::Text("\\"), s, inside, pos, f);
    if slash.res is Match {
        assert(slash.res->end == pos + 1);
        assert(eval(Expr::Text("{{"), s, inside, pos + 1, slash.far).res == Res::NoMatch);
    }
    let first = eval(
        Expr::Chain(
            Box::new(Expr::Text("\\")),
            Box::new(
                Expr::Chain(
                    Box::new(Expr::Text("{{")),
                    Box::new(Expr::Maybe(Box::new(Expr::Text("{{")))),
                ),
            ),
        ),
        s,
        inside,
        pos,
        f,
    );
    assert(first.res == Res::NoMatch);
    let again = eval(Expr::Text("\\"), s, inside, pos, first.far);
    if again.res is Match {
        let many = eval(Expr::More(Box::new(Expr::Text("\\"))), s, inside, pos + 1, again.far);
        let one = eval(Expr::Text("\\"), s, inside, pos + 1, again.far);
        if one.res is Match {
            lemma_repeat_text("\\", s, inside, pos + 2, one.far, false);
        }
        assert(!(many.res is TooDeep));
        if many.res is Match {
            let end = many.res->end;
            let look = eval(Expr::Text("{{"), s, peek(inside), end, many.far);
            assert(look.res == Res::NoMatch);
        }
    }
}

/// Without two braces side by side literal text runs to the end of the
/// input and leaves no node.
proof fn lemma_text_runs(s: Seq<u8>, c: Ctx, pos: int, f: Furthest, first: bool)
    requires
        brace_free(s),
        0 <= pos <= s.len(),
        c.depth > 0,
        c.joined,
    ensures
        repeat(literal_step("{{"), s, c, pos, f, first).res == (Res::Match {
            end: s.len() as int,
            nodes: Seq::empty(),
        }),
    decreases s.len() - pos,
{
    reveal_with_fuel(eval, 4);
    lemma_openers();
    lemma_no_escape(s, c, pos, f);
    let braces = "{{".spec_bytes();
    if text_at(s, pos, braces) {
        assert(s[pos + 0] == braces[0]);
        assert(s[pos + 1] == braces[1]);
        assert(s[pos] == 0x7b);
    }
    let one = eval(literal_step("{{"), s, c, pos, f);
    if pos < s.len() {
        assert(one.res == (Res::Match { end: pos + 1, nodes: Seq::empty() }));
        lemma_text_runs(s, c, pos + 1, one.far, false);
        let rest = repeat(literal_step("{{"), s, c, pos + 1, one.far, false);
        assert(Seq::<Node>::empty() + Seq::<Node>::empty() =~= Seq::<Node>::empty());
        assert(repeat(literal_step("{{"), s, c, pos, f, first) == after(Seq::empty(), rest));
    } else {
        assert(one.res == Res::NoMatch);
    }
}

/// Without two braces side by side the rule of literal text matches the
/// whole input, if there is any, and leaves one node.
proof fn lemma_all_text(s: Seq<u8>, c: Ctx, f: Furthest)
    requires
        brace_free(s),
        0 < s.len() <= usize::MAX,
        c.depth > 1,
        !c.mute,
    ensures
        eval(Expr::Call(Rule::raw_text), s, c, 0, f).res == (Res::Match {
            end: s.len() as int,
            nodes: seq![Node { rule: Rule::raw_text, start: 0, end: s.len() as usize, size: 0 }],
        }),
{
    reveal(body);
    reveal(spec_kind);
    reveal_with_fuel(eval, 5);
    lemma_openers();
    let inside = enter(c, Rule::raw_text, 0);
    lemma_no_escape(s, inside, 0, f);
    let braces = "{{".spec_bytes();
    if text_at(s, 0, braces) {
        assert(s[0int + 0] == braces[0]);
        assert(s[0int + 1] == braces[1]);
        assert(s[0] == 0x7b);
    }
    let one = eval(literal_step("{{"), s, inside, 0, f);
    assert(one.res == (Res::Match { end: 1, nodes: Seq::empty() }));
    lemma_text_runs(s, inside, 1, one.far, false);
    assert(Seq::<Node>::empty() + Seq::<Node>::empty() =~= Seq::<Node>::empty());
    let whole = eval(body(Rule::raw_text), s, inside, 0, f);
    assert(whole.res == (Res::Match { end: s.len() as int, nodes: Seq::empty() }));
    let head = Node { rule: Rule::raw_text, start: 0, end: s.len() as usize, size: 0 };
    assert(seq![head] + Seq::<Node>::empty() =~= seq![head]);
}

/// A look-ahead at a text.
pub open spec fn looks_at_text(e: Expr) -> bool {
    match e {
        Expr::Unless(x) => *x is Text,
        Expr::Ahead(x) => *x is Text,
        _ => false,
    }
}

/// The expression needs at least one more byte of input, as far as `k`
/// calls of rules one inside the other show.
pub open spec fn needs_input(e: Expr, k: nat) -> bool
    decreases k, e,
{
    match e {
        Expr::Text(t) => t.spec_bytes().len() > 0,
        Expr::Range(_, _) => true,
        Expr::AnyByte => true,
        Expr::Chain(a, b) => needs_input(*a, k) || (looks_at_text(*a) && needs_input(*b, k)),
        Expr::Either(a, b) => needs_input(*a, k) && needs_input(*b, k),
        Expr::More(a) => needs_input(*a, k),
        Expr::Call(r) => k > 0 && needs_input(body(r), (k - 1) as nat),
        _ => false,
    }
}

/// What needs input does not match at the end of the input.
proof fn lemma_needs_input(e: Expr, k: nat, s: Seq<u8>, c: Ctx, f: Furthest)
    requires
        needs_input(e, k),
        c.depth >= k,
    ensures
        eval(e, s, c, s.len() as int, f).res == Res::NoMatch,
    decreases k, e,
{
    let end = s.len() as int;
    match e {
        Expr::Chain(a, b) => {
            if needs_input(*a, k) {
                lemma_needs_input(*a, k, s, c, f);
            } else {
                reveal_with_fuel(eval, 2);
                let first = eval(*a, s, c, end, f);
                assert(!(first.res is TooDeep));
                if first.res is Match {
                    assert(first.res->end == end);
                    assert(gap(s, c, end) == end);
                    lemma_needs_input(*b, k, s, c, first.far);
                }
            }
        },
        Expr::Either(a, b) => {
            lemma_needs_input(*a, k, s, c, f);
            lemma_needs_input(*b, k, s, c, eval(*a, s, c, end, f).far);
        },
        Expr::More(a) => {
            lemma_needs_input(*a, k, s, c, f);
        },
        Expr::Call(r) => {
            lemma_needs_input(body(r), (k - 1) as nat, s, enter(c, r, end), f);
        },
        _ => {},
    }
}

/// The rules with which a construct of a template starts.
pub open spec fn starts_construct(r: Rule) -> bool {
    r == Rule::raw_text || r == Rule::expression || r == Rule::html_expression || r
        == Rule::helper_block || r == Rule::raw_block || r == Rule::hbs_comment || r
        == Rule::hbs_comment_compact || r == Rule::decorator_expression || r
        == Rule::decorator_block || r == Rule::partial_expression || r == Rule::partial_block
}

/// Every tag starts with braces, every escape with a backslash.
proof fn lemma_tags_need_input(r: Rule)
    requires
        r == Rule::escape || r == Rule::expression || r == Rule::html_expression || r
            == Rule::helper_block_start || r == Rule::raw_block_start || r == Rule::hbs_comment
            || r == Rule::hbs_comment_compact || r == Rule::decorator_expression || r
            == Rule::decorator_block_start || r == Rule::partial_expression || r
            == Rule::partial_block_start,
    ensures
        needs_input(Expr::Call(r), 1),
{
    reveal(body);
    reveal_with_fuel(needs_input, 5);
    lemma_openers();
}

/// Every construct of a template needs input.
proof fn lemma_constructs_need_input(r: Rule)
    requires
        starts_construct(r),
    ensures
        needs_input(Expr::Call(r), 2),
{
    if r == Rule::raw_text {
        lemma_tags_need_input(Rule::escape);
        reveal(body);
        reveal_with_fuel(needs_input, 5);
    } else if r == Rule::helper_block {
        lemma_tags_need_input(Rule::helper_block_start);
        reveal(body);
        reveal_with_fuel(needs_input, 3);
    } else if r == Rule::raw_block {
        lemma_tags_need_input(Rule::raw_block_start);
        reveal(body);
        reveal_with_fuel(needs_input, 3);
    } else if r == Rule::decorator_block {
        lemma_tags_need_input(Rule::decorator_block_start);
        reveal(body);
        reveal_with_fuel(needs_input, 3);
    } else if r == Rule::partial_block {
        lemma_tags_need_input(Rule::partial_block_start);
        reveal(body);
        reveal_with_fuel(needs_input, 3);
    } else {
        lemma_tags_need_input(r);
        lemma_deeper(Expr::Call(r), 1);
    }
}

/// What needs input as far as `k` calls show does so as far as one more
/// shows.
proof fn lemma_deeper(e: Expr, k: nat)
    requires
        needs_input(e, k),
    ensures
        needs_input(e, k + 1),
    decreases k, e,
{
    match e {
        Expr::Chain(a, b) => {
            if needs_input(*a, k) {
                lemma_deeper(*a, k);
            } else {
                lemma_deeper(*b, k);
            }
        },
        Expr::Either(a, b) => {
            lemma_deeper(*a, k);
            lemma_deeper(*b, k);
        },
        Expr::More(a) => {
            lemma_deeper(*a, k);
        },
        Expr::Call(r) => {
            lemma_deeper(body(r), (k - 1) as nat);
        },
        _ => {},
    }
}

/// At the end of the input no construct matches.
proof fn lemma_nothing_at_end(s: Seq<u8>, c: Ctx, f: Furthest)
    requires
        c.depth > 1,
    ensures
        eval(construct(), s, c, s.len() as int, f).res == Res::NoMatch,
{
    lemma_constructs_need_input(Rule::raw_text);
    lemma_constructs_need_input(Rule::expression);
    lemma_constructs_need_input(Rule::html_expression);
    lemma_constructs_need_input(Rule::helper_block);
    lemma_constructs_need_input(Rule::raw_block);
    lemma_constructs_need_input(Rule::hbs_comment);
    lemma_constructs_need_input(Rule::hbs_comment_compact);
    lemma_constructs_need_input(Rule::decorator_expression);
    lemma_constructs_need_input(Rule::decorator_block);
    lemma_constructs_need_input(Rule::partial_expression);
    lemma_constructs_need_input(Rule::partial_block);
    assert(needs_input(construct(), 2)) by {
        reveal_with_fuel(needs_input, 12);
    }
    lemma_needs_input(construct(), 2, s, c, f);
}

/// The tree of a template that is one literal text.
pub open spec fn one_text(len: int) -> Seq<Node> {
    seq![
        Node { rule: Rule::template, start: 0, end: len as usize, size: 1 },
        Node { rule: Rule::raw_text, start: 0, end: len as usize, size: 0 },
    ]
}

/// Without two braces side by side the rule of templates matches the whole
/// input and leaves the one text.
proof fn lemma_template_of_text(s: Seq<u8>, c: Ctx, f: Furthest)
    requires
        brace_free(s),
        0 < s.len() <= usize::MAX,
        c.depth > 2,
        !c.mute,
    ensures
        eval(Expr::Call(Rule::template), s, c, 0, f).res == (Res::Match {
            end: s.len() as int,
            nodes: one_text(s.len() as int),
        }),
{
    reveal(body);
    reveal(spec_kind);
    reveal_with_fuel(eval, 3);
    let inside = enter(c, Rule::template, 0);
    let text = Node { rule: Rule::raw_text, start: 0, end: s.len() as usize, size: 0 };
    lemma_all_text(s, inside, f);
    let one = eval(construct(), s, inside, 0, f);
    assert(one.res == (Res::Match { end: s.len() as int, nodes: seq![text] }));
    lemma_nothing_at_end(s, inside, one.far);
    let rest = repeat(construct(), s, inside, s.len() as int, one.far, false);
    assert(rest.res == (Res::Match { end: s.len() as int, nodes: Seq::empty() }));
    assert(seq![text] + Seq::<Node>::empty() =~= seq![text]);
    let whole = repeat(construct(), s, inside, 0, f, true);
    assert(whole.res == (Res::Match { end: s.len() as int, nodes: seq![text] }));
    let head = Node { rule: Rule::template, start: 0, end: s.len() as usize, size: 1 };
    assert(seq![head] + seq![text] =~= one_text(s.len() as int));
}

/// A text without two opening braces side by side is one literal text:
/// compiling it gives a template whose only child is a `raw_text` that
/// covers the whole input. The empty input is left out: its template has
/// no child.
pub proof fn law_plain_text(s: Seq<u8>, depth: usize)
    requires
        brace_free(s),
        0 < s.len() <= usize::MAX,
        depth >= 4,
    ensures
        is_literal_text(s, depth),
        parsed(Rule::handlebars, s, depth).res == (Res::Match {
            end: s.len() as int,
            nodes: one_text(s.len() as int),
        }),
        compiled(s, depth) == Ok::<TemplateView, Fault>(
            TemplateView { source: s, nodes: one_text(s.len() as int) },
        ),
{
    assert(is_literal_text(s, depth)) by {
        lemma_bodies();
        lemma_all_text(s, top_of_template(depth), nothing_tried());
    }
    reveal(body);
    reveal(spec_kind);
    reveal_with_fuel(eval, 3);
    let c = outset(Rule::handlebars, depth);
    let f = nothing_tried();
    let inside = enter(c, Rule::handlebars, 0);
    lemma_template_of_text(s, inside, f);
    let n = one_text(s.len() as int);
    assert(skip_space(s, s.len() as int) == s.len());
    assert(n + Seq::<Node>::empty() =~= n);
    assert(parsed(Rule::handlebars, s, depth).res == (Res::Match {
        end: s.len() as int,
        nodes: n,
    }));
    reveal_with_fuel(first_ill_named, 3);
    assert(first_ill_named(s, n, 0) is None);
    reveal_with_fuel(tag_before, 2);
    assert(tag_before(n, 1) is None);
    assert(tag_from(n, 2) is None);
    assert(narrowed(s, n, 1) == n[1]) by {
        reveal(narrowed);
    }
    assert(narrowed(s, n, 0) == n[0]) by {
        reveal(narrowed);
    }
    assert(trimmed(s, n) =~= n);
}

/// The bodies of the rules that make up a template of text.
proof fn lemma_bodies()
    ensures
        body(Rule::raw_text) == Expr::More(Box::new(literal_step("{{"))),
        body(Rule::template) == Expr::Many(Box::new(construct())),
        body(Rule::handlebars) == Expr::Chain(
            Box::new(Expr::Call(Rule::template)),
            Box::new(Expr::End),
        ),
        spec_kind(Rule::raw_text) == RuleKind::Joined,
        spec_kind(Rule::template) == RuleKind::Joined,
        spec_kind(Rule::handlebars) == RuleKind::Silent,
        spec_kind(Rule::escape) == RuleKind::Token,
{
    reveal(body);
    reveal(spec_kind);
}

/// The rule of literal text calls the rule of escapes: it matches only
/// where two rules may still be entered.
proof fn lemma_text_needs_depth(s: Seq<u8>, c: Ctx, pos: int, f: Furthest)
    requires
        c.depth <= 1,
    ensures
        !(eval(Expr::Call(Rule::raw_text), s, c, pos, f).res is Match),
{
    lemma_bodies();
    reveal_with_fuel(eval, 4);
}

/// From `from` on, every node is an escape.
pub open spec fn all_escapes(n: Seq<Node>, from: int) -> bool {
    forall|j: int| from <= j < n.len() ==> (#[trigger] n[j]).rule == Rule::escape
}

/// One step through literal text leaves escapes only.
proof fn lemma_step_leaves_escapes(s: Seq<u8>, c: Ctx, pos: int, f: Furthest)
    ensures
        eval(literal_step("{{"), s, c, pos, f).res matches Res::Match { nodes, .. } ==> all_escapes(
            nodes,
            0,
        ),
{
    lemma_bodies();
    reveal_with_fuel(eval, 4);
    let one = eval(literal_step("{{"), s, c, pos, f);
    match one.res {
        Res::Match { end, nodes } => {
            let first = eval(Expr::Call(Rule::escape), s, c, pos, f);
            if first.res is Match {
                assert(nodes == first.res->nodes);
            } else {
                assert(nodes =~= Seq::<Node>::empty());
            }
        },
        _ => {},
    }
}

/// Steps through literal text leave escapes only.
proof fn lemma_steps_leave_escapes(s: Seq<u8>, c: Ctx, pos: int, f: Furthest, first: bool)
    ensures
        repeat(literal_step("{{"), s, c, pos, f, first).res matches Res::Match { nodes, .. }
            ==> all_escapes(nodes, 0),
    decreases s.len() - pos,
{
    if 0 <= pos <= s.len() {
        let from = if first {
            pos
        } else {
            gap(s, c, pos)
        };
        lemma_step_leaves_escapes(s, c, from, f);
        let one = eval(literal_step("{{"), s, c, from, f);
        match one.res {
            Res::Match { end, nodes } => {
                if pos < end <= s.len() {
                    lemma_steps_leave_escapes(s, c, end, one.far, false);
                }
            },
            _ => {},
        }
    }
}

/// A match of the rule of literal text leaves one node for the text and
/// below it an escape for each escape in the text.
proof fn lemma_text_leaves_escapes(s: Seq<u8>, c: Ctx, pos: int, f: Furthest)
    requires
        !c.mute,
    ensures
        eval(Expr::Call(Rule::raw_text), s, c, pos, f).res matches Res::Match { end, nodes } ==> {
            &&& nodes.len() > 0
            &&& nodes[0] == Node {
                rule: Rule::raw_text,
                start: pos as usize,
                end: end as usize,
                size: (nodes.len() - 1) as usize,
            }
            &&& all_escapes(nodes, 1)
        },
{
    lemma_bodies();
    reveal_with_fuel(eval, 2);
    if c.depth > 0 {
        let inside = enter(c, Rule::raw_text, pos);
        lemma_step_leaves_escapes(s, inside, pos, f);
        let one = eval(literal_step("{{"), s, inside, pos, f);
        match one.res {
            Res::Match { end, nodes } => {
                if pos < end {
                    lemma_steps_leave_escapes(s, inside, end, one.far, false);
                }
            },
            _ => {},
        }
    }
}

/// Where no block stands from `from` on, no block is ill named.
proof fn lemma_no_block_none_ill(src: Seq<u8>, n: Seq<Node>, from: int)
    requires
        forall|j: int| from <= j < n.len() ==> !is_block_rule((#[trigger] n[j]).rule),
    ensures
        first_ill_named(src, n, from) is None,
    decreases n.len() - from,
{
    if 0 <= from < n.len() {
        lemma_no_block_none_ill(src, n, from + 1);
    }
}

/// Where no tag stands from `from` on, none is found.
proof fn lemma_no_tag_from(n: Seq<Node>, from: int)
    requires
        forall|j: int| from <= j < n.len() ==> !is_tag_rule((#[trigger] n[j]).rule),
    ensures
        tag_from(n, from) is None,
    decreases n.len() - from,
{
    if 0 <= from < n.len() {
        lemma_no_tag_from(n, from + 1);
    }
}

/// The context in which the constructs of a whole template are tried.
pub open spec fn top_of_template(depth: usize) -> Ctx {
    enter(enter(outset(Rule::handlebars, depth), Rule::handlebars, 0), Rule::template, 0)
}

/// What the rule of literal text makes of `s` where a template starts.
pub open spec fn as_text(s: Seq<u8>, depth: usize) -> Res {
    eval(
        Expr::Call(Rule::raw_text),
        s,
        top_of_template(depth),
        0,
        nothing_tried(),
    ).res
}

/// The whole of `s` is literal text: the rule of literal text, tried where
/// a template starts, matches up to the end.
pub open spec fn is_literal_text(s: Seq<u8>, depth: usize) -> bool {
    &&& depth >= 2
    &&& as_text(s, depth) matches Res::Match { end, .. } && end == s.len()
}

/// The tree of a template whose one construct left the nodes `text`.
pub open spec fn tree_of_text(len: int, text: Seq<Node>) -> Seq<Node> {
    seq![Node { rule: Rule::template, start: 0, end: len as usize, size: text.len() as usize }]
        + text
}

/// Where the whole input is literal text, the parse of the template is
/// that text below the template.
proof fn lemma_parse_of_text(s: Seq<u8>, depth: usize)
    requires
        is_literal_text(s, depth),
    ensures
        s.len() > 0,
        parsed(Rule::handlebars, s, depth).res == (Res::Match {
            end: s.len() as int,
            nodes: tree_of_text(s.len() as int, as_text(s, depth)->nodes),
        }),
{
    let len = s.len() as int;
    let f0 = nothing_tried();
    let top = top_of_template(depth);
    let text = as_text(s, depth)->nodes;
    lemma_bodies();
    assert(top.depth > 1 && len > 0) by {
        if top.depth <= 1 {
            lemma_text_needs_depth(s, top, 0, f0);
        } else if len == 0 {
            lemma_constructs_need_input(Rule::raw_text);
            lemma_needs_input(Expr::Call(Rule::raw_text), 2, s, top, f0);
        }
    }
    let one = eval(construct(), s, top, 0, f0);
    assert(one.res == as_text(s, depth)) by {
        reveal_with_fuel(eval, 2);
    }
    lemma_nothing_at_end(s, top, one.far);
    let rest = repeat(construct(), s, top, len, one.far, false);
    assert(rest.res == (Res::Match { end: len, nodes: Seq::empty() }));
    assert(text + Seq::<Node>::empty() =~= text);
    let whole = repeat(construct(), s, top, 0, f0, true);
    assert(whole.res == (Res::Match { end: len, nodes: text }));
    let tree = tree_of_text(len, text);
    let mid = enter(outset(Rule::handlebars, depth), Rule::handlebars, 0);
    let inner = eval(Expr::Call(Rule::template), s, mid, 0, f0);
    assert(inner.res == (Res::Match { end: len, nodes: tree })) by {
        reveal_with_fuel(eval, 2);
    }
    assert(skip_space(s, len) == len);
    assert(tree + Seq::<Node>::empty() =~= tree);
    assert(parsed(Rule::handlebars, s, depth).res == (Res::Match { end: len, nodes: tree })) by {
        reveal_with_fuel(eval, 3);
    }
}

/// A node that is no literal text stays as it is.
proof fn lemma_other_stays(s: Seq<u8>, n: Seq<Node>, i: int)
    requires
        n[i].rule != Rule::raw_text,
    ensures
        narrowed(s, n, i) == n[i],
{
    reveal(narrowed);
}

/// A literal text with no tag before it and none behind it stays as it is.
proof fn lemma_lonely_text_stays(s: Seq<u8>, n: Seq<Node>, i: int)
    requires
        tag_before(n, i) is None,
        tag_from(n, i + 1) is None,
    ensures
        narrowed(s, n, i) == n[i],
{
    reveal(narrowed);
}

/// In a template that holds a text and its escapes no block is ill named.
proof fn lemma_text_has_no_block(s: Seq<u8>, text: Seq<Node>)
    requires
        text.len() > 0,
        text[0].rule == Rule::raw_text,
        all_escapes(text, 1),
    ensures
        first_ill_named(s, tree_of_text(s.len() as int, text), 0) is None,
{
    let tree = tree_of_text(s.len() as int, text);
    assert forall|j: int| 0 <= j < tree.len() implies !is_block_rule(
        (#[trigger] tree[j]).rule,
    ) by {
        if j >= 1 {
            assert(tree[j] == text[j - 1]);
        }
    }
    lemma_no_block_none_ill(s, tree, 0);
}

/// A template that holds a text and its escapes is narrowed nowhere.
proof fn lemma_text_passes(s: Seq<u8>, text: Seq<Node>)
    requires
        text.len() > 0,
        text[0].rule == Rule::raw_text,
        all_escapes(text, 1),
    ensures
        trimmed(s, tree_of_text(s.len() as int, text)) == tree_of_text(s.len() as int, text),
{
    let tree = tree_of_text(s.len() as int, text);
    assert forall|j: int| 2 <= j < tree.len() implies (#[trigger] tree[j]).rule
        == Rule::escape by {
        assert(tree[j] == text[j - 1]);
    }
    assert forall|j: int| 2 <= j < tree.len() implies !is_tag_rule((#[trigger] tree[j]).rule) by {
        assert(tree[j].rule == Rule::escape);
    }
    lemma_no_tag_from(tree, 2);
    assert(tag_before(tree, 1) is None) by {
        reveal_with_fuel(tag_before, 2);
    }
    assert forall|j: int| 0 <= j < tree.len() implies narrowed(s, tree, j) == tree[j] by {
        if j == 1 {
            lemma_lonely_text_stays(s, tree, 1);
        } else {
            lemma_other_stays(s, tree, j);
        }
    }
    assert(trimmed(s, tree) =~= tree);
}

/// An input that is literal text from end to end, opening braces
/// occurring only in escapes, compiles to a template with a single text:
/// below the template stands one `raw_text` that covers the whole input,
/// and below that nothing but the escapes.
pub proof fn law_literal_text(s: Seq<u8>, depth: usize)
    requires
        is_literal_text(s, depth),
    ensures
        ({
            let text = as_text(s, depth)->nodes;
            &&& text.len() > 0
            &&& text[0] == Node {
                rule: Rule::raw_text,
                start: 0,
                end: s.len() as usize,
                size: (text.len() - 1) as usize,
            }
            &&& all_escapes(text, 1)
            &&& compiled(s, depth) == Ok::<TemplateView, Fault>(
                TemplateView { source: s, nodes: tree_of_text(s.len() as int, text) },
            )
        }),
{
    let text = as_text(s, depth)->nodes;
    lemma_bodies();
    lemma_text_leaves_escapes(s, top_of_template(depth), 0, nothing_tried());
    lemma_parse_of_text(s, depth);
    lemma_text_has_no_block(s, text);
    lemma_text_passes(s, text);
}

/// Two opening braces stand at `pos`.
pub open spec fn braces_at(s: Seq<u8>, pos: int) -> bool {
    0 <= pos && pos + 1 < s.len() && s[pos] == 0x7b && s[pos + 1] == 0x7b
}

/// A backslash stands at `pos`.
pub open spec fn backslash_at(s: Seq<u8>, pos: int) -> bool {
    0 <= pos < s.len() && s[pos] == 0x5c
}

/// The node that an escape from `pos` to `end` leaves.
pub open spec fn escape_node(pos: int, end: int) -> Seq<Node> {
    seq![Node { rule: Rule::escape, start: pos as usize, end: end as usize, size: 0 }]
}

/// Whether the text `{{` stands at a position is whether two braces do.
proof fn lemma_braces(s: Seq<u8>, pos: int)
    ensures
        text_at(s, pos, "{{".spec_bytes()) == braces_at(s, pos),
        text_at(s, pos, "\\".spec_bytes()) == backslash_at(s, pos),
{
    lemma_openers();
    let braces = "{{".spec_bytes();
    let slash = "\\".spec_bytes();
    if text_at(s, pos, braces) {
        assert(s[pos + 0] == braces[0]);
        assert(s[pos + 1] == braces[1]);
    }
    if text_at(s, pos, slash) {
        assert(s[pos + 0] == slash[0]);
    }
}

/// A backslash before braces matches the first form of escape, with two
/// more braces if they follow at once.
proof fn lemma_escaped_braces(s: Seq<u8>, c: Ctx, pos: int, f: Furthest)
    requires
        backslash_at(s, pos),
        braces_at(s, pos + 1),
        c.joined,
    ensures
        eval(escaped_braces(), s, c, pos, f).res == (Res::Match {
            end: if braces_at(s, pos + 3) {
                pos + 5
            } else {
                pos + 3
            },
            nodes: Seq::empty(),
        }),
{
    lemma_openers();
    lemma_braces(s, pos);
    lemma_braces(s, pos + 1);
    lemma_braces(s, pos + 3);
    let nothing = Seq::<Node>::empty();
    assert(nothing + nothing =~= nothing);
    let end = if braces_at(s, pos + 3) {
        pos + 5
    } else {
        pos + 3
    };
    let slash = eval(Expr::Text("\\"), s, c, pos, f);
    assert(slash.res == (Res::Match { end: pos + 1, nodes: nothing }));
    let braces = eval(Expr::Text("{{"), s, c, pos + 1, slash.far);
    assert(braces.res == (Res::Match { end: pos + 3, nodes: nothing }));
    let more = eval(Expr::Maybe(Box::new(Expr::Text("{{"))), s, c, pos + 3, braces.far);
    assert(more.res == (Res::Match { end, nodes: nothing })) by {
        reveal_with_fuel(eval, 2);
    }
    let tail = eval(
        Expr::Chain(
            Box::new(Expr::Text("{{")),
            Box::new(Expr::Maybe(Box::new(Expr::Text("{{")))),
        ),
        s,
        c,
        pos + 1,
        slash.far,
    );
    assert(tail.res == (Res::Match { end, nodes: nothing }));
}

/// A single backslash right before two opening braces makes them literal
/// text: the three bytes are an escape, and so are two more braces that
/// follow at once. No tag starts at those braces.
pub proof fn law_backslash_escapes(s: Seq<u8>, c: Ctx, pos: int, f: Furthest)
    requires
        backslash_at(s, pos),
        braces_at(s, pos + 1),
        c.depth > 0,
        !c.mute,
    ensures
        ({
            let end = if braces_at(s, pos + 3) {
                pos + 5
            } else {
                pos + 3
            };
            &&& eval(Expr::Call(Rule::escape), s, c, pos, f).res == (Res::Match {
                end,
                nodes: escape_node(pos, end),
            })
            &&& eval(literal_step("{{"), s, c, pos, f).res == (Res::Match {
                end,
                nodes: escape_node(pos, end),
            })
        }),
{
    lemma_escape_body();
    let inside = enter(c, Rule::escape, pos);
    lemma_escaped_braces(s, inside, pos, f);
    let end = if braces_at(s, pos + 3) {
        pos + 5
    } else {
        pos + 3
    };
    let whole = eval(body(Rule::escape), s, inside, pos, f);
    assert(whole.res == (Res::Match { end, nodes: Seq::empty() }));
    let called = eval(Expr::Call(Rule::escape), s, c, pos, f);
    assert(called.res == (Res::Match { end, nodes: escape_node(pos, end) }));
    assert(eval(literal_step("{{"), s, c, pos, f).res == called.res);
}

/// The escape of braces: a backslash, two braces, and two more if they
/// follow.
pub open spec fn escaped_braces() -> Expr {
    Expr::Chain(
        Box::new(Expr::Text("\\")),
        Box::new(
            Expr::Chain(
                Box::new(Expr::Text("{{")),
                Box::new(Expr::Maybe(Box::new(Expr::Text("{{")))),
            ),
        ),
    )
}

/// The escape of a backslash: a backslash, then backslashes up to two
/// braces.
pub open spec fn escaped_backslashes() -> Expr {
    Expr::Chain(
        Box::new(Expr::Text("\\")),
        Box::new(
            Expr::Chain(
                Box::new(Expr::More(Box::new(Expr::Text("\\")))),
                Box::new(Expr::Ahead(Box::new(Expr::Text("{{")))),
            ),
        ),
    )
}

/// The rule of escapes is a token of these two forms.
proof fn lemma_escape_body()
    ensures
        body(Rule::escape) == Expr::Either(
            Box::new(escaped_braces()),
            Box::new(escaped_backslashes()),
        ),
        spec_kind(Rule::escape) == RuleKind::Token,
{
    reveal(body);
    reveal(spec_kind);
}

/// Behind a backslash that no braces follow the first form of escape
/// does not match.
proof fn lemma_no_escaped_braces(s: Seq<u8>, c: Ctx, pos: int, f: Furthest)
    requires
        !braces_at(s, pos + 1),
        c.joined,
    ensures
        eval(escaped_braces(), s, c, pos, f).res == Res::NoMatch,
{
    reveal_with_fuel(eval, 3);
    lemma_openers();
    lemma_braces(s, pos);
    lemma_braces(s, pos + 1);
}

/// One backslash that no other follows is all that a run of backslashes
/// matches.
proof fn lemma_one_backslash(s: Seq<u8>, c: Ctx, pos: int, f: Furthest)
    requires
        backslash_at(s, pos),
        !backslash_at(s, pos + 1),
        c.joined,
    ensures
        eval(Expr::More(Box::new(Expr::Text("\\"))), s, c, pos, f).res == (Res::Match {
            end: pos + 1,
            nodes: Seq::empty(),
        }),
{
    lemma_openers();
    lemma_braces(s, pos);
    lemma_braces(s, pos + 1);
    let nothing = Seq::<Node>::empty();
    assert(nothing + nothing =~= nothing);
    let one = eval(Expr::Text("\\"), s, c, pos, f);
    assert(one.res == (Res::Match { end: pos + 1, nodes: nothing }));
    let next = eval(Expr::Text("\\"), s, c, pos + 1, one.far);
    assert(next.res == Res::NoMatch);
    let rest = repeat(Expr::Text("\\"), s, c, pos + 1, one.far, false);
    assert(rest.res == (Res::Match { end: pos + 1, nodes: nothing }));
    assert(eval(Expr::More(Box::new(Expr::Text("\\"))), s, c, pos, f).res == (Res::Match {
        end: pos + 1,
        nodes: nothing,
    })) by {
        reveal_with_fuel(eval, 2);
    }
}

/// Two backslashes before two braces match the second form of escape,
/// which leaves the braces where they are.
proof fn lemma_escaped_backslash(s: Seq<u8>, c: Ctx, pos: int, f: Furthest)
    requires
        backslash_at(s, pos),
        backslash_at(s, pos + 1),
        braces_at(s, pos + 2),
        c.joined,
    ensures
        eval(escaped_backslashes(), s, c, pos, f).res == (Res::Match {
            end: pos + 2,
            nodes: Seq::empty(),
        }),
{
    lemma_openers();
    lemma_braces(s, pos);
    lemma_braces(s, pos + 2);
    let nothing = Seq::<Node>::empty();
    assert(nothing + nothing =~= nothing);
    let slash = eval(Expr::Text("\\"), s, c, pos, f);
    assert(slash.res == (Res::Match { end: pos + 1, nodes: nothing }));
    lemma_one_backslash(s, c, pos + 1, slash.far);
    let many = eval(Expr::More(Box::new(Expr::Text("\\"))), s, c, pos + 1, slash.far);
    let look = eval(Expr::Ahead(Box::new(Expr::Text("{{"))), s, c, pos + 2, many.far);
    assert(look.res == (Res::Match { end: pos + 2, nodes: nothing })) by {
        reveal_with_fuel(eval, 2);
    }
    let tail = eval(
        Expr::Chain(
            Box::new(Expr::More(Box::new(Expr::Text("\\")))),
            Box::new(Expr::Ahead(Box::new(Expr::Text("{{")))),
        ),
        s,
        c,
        pos + 1,
        slash.far,
    );
    assert(tail.res == (Res::Match { end: pos + 2, nodes: nothing }));
}

/// Two backslashes before two opening braces escape nothing: they are
/// matched as literal text of their own, which ends before the braces.
pub proof fn law_double_backslash_stops(s: Seq<u8>, c: Ctx, pos: int, f: Furthest)
    requires
        backslash_at(s, pos),
        backslash_at(s, pos + 1),
        braces_at(s, pos + 2),
        c.depth > 0,
        !c.mute,
    ensures
        eval(Expr::Call(Rule::escape), s, c, pos, f).res == (Res::Match {
            end: pos + 2,
            nodes: escape_node(pos, pos + 2),
        }),
{
    lemma_escape_body();
    let inside = enter(c, Rule::escape, pos);
    lemma_no_escaped_braces(s, inside, pos, f);
    let first = eval(escaped_braces(), s, inside, pos, f);
    lemma_escaped_backslash(s, inside, pos, first.far);
    let whole = eval(body(Rule::escape), s, inside, pos, f);
    assert(whole.res == (Res::Match { end: pos + 2, nodes: Seq::empty() }));
}

/// Literal text ends where two opening braces stand that no backslash
/// escapes: there a tag has to start.
pub proof fn law_braces_end_text(s: Seq<u8>, c: Ctx, pos: int, f: Furthest)
    requires
        braces_at(s, pos),
        c.depth > 0,
    ensures
        eval(literal_step("{{"), s, c, pos, f).res == Res::NoMatch,
{
    reveal(body);
    reveal_with_fuel(eval, 6);
    lemma_braces(s, pos);
    lemma_openers();
}

/// The backslash of an escape is no part of the literal text: of a text
/// that holds one escape, the text is what stands before the backslash
/// and what stands behind it.
pub proof fn law_backslash_is_dropped(src: Seq<u8>, n: Seq<Node>, i: int)
    requires
        0 <= i,
        n[i].size == 1,
        n[i + 1].rule == Rule::escape,
        n[i].start <= n[i + 1].start < n[i].end,
    ensures
        text_of(src, n, i) == src.subrange(n[i].start as int, n[i + 1].start as int)
            + src.subrange(n[i + 1].start + 1, n[i].end as int),
{
    reveal_with_fuel(plain, 3);
}

} // verus!

//! Parsing an input by a rule of the grammar.
use crate::engine::{run, Step, Trace};
use crate::error::{failure, fault, Error, Fault};
use crate::expr::Expr;
use crate::grammar::Table;
use crate::rule::Rule;
use crate::semantics::{nothing_tried, parsed, Ctx, Out, Res};
use crate::tree::{framed, Node, Pairs};
use vstd::prelude::*;
use vstd::string::StringSliceAdditionalSpecFns;

verus! {

/// How many rules may be entered one inside the other where no other limit
/// is given.
pub const MAX_DEPTH: usize = 128;

/// The result `r` tells the outcome `out` of a parse of `len` bytes: the
/// nodes where it matched, and else the error that is due.
pub open spec fn reports(r: Result<Pairs, Error>, out: Out, len: int) -> bool {
    match out.res {
        Res::Match { end, nodes } => r matches Ok(p) && p@ == nodes,
        Res::NoMatch => r matches Err(e) && e@ == fault(out.far, len),
        Res::TooDeep => r matches Err(e) && e@ == Fault::DepthExceeded,
    }
}

/// Parses `src` from its start by `rule`, with at most `depth` rules one
/// inside the other. The rule need not match up to the end of the input.
pub fn parse_bytes(rule: Rule, src: &[u8], depth: usize) -> (r: Result<Pairs, Error>)
    ensures
        reports(r, parsed(rule, src@, depth), src@.len() as int),
        r matches Ok(p) ==> framed(p@, 0, src@.len() as int),
{
    let table = Table::new();
    let mut nodes: Vec<Node> = Vec::new();
    let mut far = Trace { at: 0, tried: Vec::new() };
    let c = Ctx { depth, joined: false, mute: false, quiet: false, rule, since: 0 };
    let e = Expr::Call(rule);
    assert(far@ == nothing_tried());
    let ghost out = parsed(rule, src@, depth);
    match run(&table, &e, src, c, 0, &mut nodes, &mut far) {
        Step::Match(_) => {
            assert(nodes@ =~= out.res->nodes);
            assert(framed(nodes@, 0, src@.len() as int));
            Ok(Pairs::new(nodes))
        },
        Step::NoMatch => Err(failure(far.at, far.tried, src.len())),
        Step::TooDeep => Err(Error::DepthExceeded),
    }
}

/// The parser of the template language.
pub struct HandlebarsParser;

impl HandlebarsParser {
    /// Parses `input` from its start by `rule`. Positions are offsets into
    /// the UTF-8 encoding of `input`.
    pub fn parse(rule: Rule, input: &str) -> (r: Result<Pairs, Error>)
        ensures
            reports(
                r,
                parsed(rule, input.spec_bytes(), MAX_DEPTH),
                input.spec_bytes().len() as int,
            ),
            r matches Ok(p) ==> framed(p@, 0, input.spec_bytes().len() as int),
    {
        parse_bytes(rule, input.as_bytes(), MAX_DEPTH)
    }
}

} // verus!

//! Parsing expressions: the shapes from which the grammar's rules are made.
use crate::rule::Rule;
use vstd::prelude::*;

verus! {

/// A parsing expression. Choice is ordered and repetition is greedy; a
/// look-ahead consumes nothing.
#[derive(Debug)]
pub enum Expr {
    /// The given text, byte for byte.
    Text(&'static str),
    /// One byte between the two bounds, both included.
    Range(u8, u8),
    /// One byte, whatever it is.
    AnyByte,
    /// The end of the input.
    End,
    /// The first, then the second.
    Chain(Box<Expr>, Box<Expr>),
    /// The first or, where it does not match, the second.
    Either(Box<Expr>, Box<Expr>),
    /// The expression, or nothing where it does not match.
    Maybe(Box<Expr>),
    /// The expression as often as it matches, possibly never.
    Many(Box<Expr>),
    /// The expression as often as it matches, at least once.
    More(Box<Expr>),
    /// Matches, consuming nothing, where the expression does not.
    Unless(Box<Expr>),
    /// Matches, consuming nothing, where the expression does.
    Ahead(Box<Expr>),
    /// The body of the named rule.
    Call(Rule),
}

pub open spec fn spec_text(t: &'static str) -> Expr {
    Expr::Text(t)
}

pub open spec fn spec_range(lo: u8, hi: u8) -> Expr {
    Expr::Range(lo, hi)
}

pub open spec fn spec_chain(a: Expr, b: Expr) -> Expr {
    Expr::Chain(Box::new(a), Box::new(b))
}

pub open spec fn spec_either(a: Expr, b: Expr) -> Expr {
    Expr::Either(Box::new(a), Box::new(b))
}

pub open spec fn spec_maybe(a: Expr) -> Expr {
    Expr::Maybe(Box::new(a))
}

pub open spec fn spec_many(a: Expr) -> Expr {
    Expr::Many(Box::new(a))
}

pub open spec fn spec_more(a: Expr) -> Expr {
    Expr::More(Box::new(a))
}

pub open spec fn spec_unless(a: Expr) -> Expr {
    Expr::Unless(Box::new(a))
}

pub open spec fn spec_ahead(a: Expr) -> Expr {
    Expr::Ahead(Box::new(a))
}

pub open spec fn spec_call(r: Rule) -> Expr {
    Expr::Call(r)
}

#[verifier::when_used_as_spec(spec_text)]
pub fn text(t: &'static str) -> (e: Expr)
    ensures
        e == spec_text(t),
{
    Expr::Text(t)
}

#[verifier::when_used_as_spec(spec_range)]
pub fn range(lo: u8, hi: u8) -> (e: Expr)
    ensures
        e == spec_range(lo, hi),
{
    Expr::Range(lo, hi)
}

#[verifier::when_used_as_spec(spec_chain)]
pub fn chain(a: Expr, b: Expr) -> (e: Expr)
    ensures
        e == spec_chain(a, b),
{
    Expr::Chain(Box::new(a), Box::new(b))
}

#[verifier::when_used_as_spec(spec_either)]
pub fn either(a: Expr, b: Expr) -> (e: Expr)
    ensures
        e == spec_either(a, b),
{
    Expr::Either(Box::new(a), Box::new(b))
}

#[verifier::when_used_as_spec(spec_maybe)]
pub fn maybe(a: Expr) -> (e: Expr)
    ensures
        e == spec_maybe(a),
{
    Expr::Maybe(Box::new(a))
}

#[verifier::when_used_as_spec(spec_many)]
pub fn many(a: Expr) -> (e: Expr)
    ensures
        e == spec_many(a),
{
    Expr::Many(Box::new(a))
}

#[verifier::when_used_as_spec(spec_more)]
pub fn more(a: Expr) -> (e: Expr)
    ensures
        e == spec_more(a),
{
    Expr::More(Box::new(a))
}

#[verifier::when_used_as_spec(spec_unless)]
pub fn unless(a: Expr) -> (e: Expr)
    ensures
        e == spec_unless(a),
{
    Expr::Unless(Box::new(a))
}

#[verifier::when_used_as_spec(spec_ahead)]
pub fn ahead(a: Expr) -> (e: Expr)
    ensures
        e == spec_ahead(a),
{
    Expr::Ahead(Box::new(a))
}

#[verifier::when_used_as_spec(spec_call)]
pub fn call(r: Rule) -> (e: Expr)
    ensures
        e == spec_call(r),
{
    Expr::Call(r)
}

} // verus!
